use cmux_herdr::bridge::{agents_from_list, panes_from_list, tabs_from_list, workspaces_from_list};
use cmux_herdr::json::Json;
use cmux_herdr::live::{restore_record_path, sessions_from_snapshot};
use cmux_herdr::model::{pane_from_raw, snapshot_from_session_payload, tab_from_raw, Pane, Snapshot, Workspace};
use cmux_herdr::nest::{display_name, extract_id, nest_decision, NestDecision};
use cmux_herdr::pump::{classify_event, event_body, event_string, event_type};
use cmux_herdr::rail::{
    agent_panes_for_rail, dedupe_panes_by_status_key, dock_actions, feed_events_from_transition, rail_agents_from_snapshot,
    rail_counts, RailAgent,
};
use cmux_herdr::tree::format_tree;
use cmux_herdr::state::{
    association_key_for_pane, format_associations, infer_parent_once, prior_for_pane, resolve_association_parents,
    title_lock_change, update_association_map,
};
use cmux_herdr::status::{locked_display_name, should_write_status_pill, status_value_for_pane, status_write_payload};
use serde_json::Value;

fn conv(v: &Value) -> Json {
    match v {
        Value::Null => Json::Null,
        Value::Bool(b) => Json::Bool(*b),
        Value::Number(n) => {
            let whole = n.as_i64().or_else(|| {
                n.as_f64()
                    .filter(|f| f.fract() == 0.0 && *f >= -9223372036854775808.0 && *f < 9223372036854775808.0)
                    .map(|f| f as i64)
            });
            let trunc = n.as_i64().unwrap_or_else(|| n.as_f64().unwrap_or(0.0) as i64);
            Json::Number { text: n.to_string(), whole, trunc }
        }
        Value::String(s) => Json::Str(s.clone()),
        Value::Array(items) => Json::Array { items: items.iter().map(conv).collect(), text: v.to_string() },
        Value::Object(map) => Json::Object {
            entries: map.iter().map(|(k, x)| (k.clone(), conv(x))).collect(),
            text: v.to_string(),
        },
    }
}

fn json(text: &str) -> Json {
    conv(&serde_json::from_str::<Value>(text).unwrap())
}

fn pane(text: &str) -> Pane {
    pane_from_raw(&json(text))
}

fn empty_snapshot(panes: Vec<Pane>) -> Snapshot {
    Snapshot { panes, tabs: vec![], workspaces: vec![], layouts: json("{}") }
}

#[test]
fn pane_from_raw_prefers_top_level_agent_and_session_path() {
    let p = pane(
        r#"{"pane_id": "p1", "tab_id": "t1", "workspace_id": "w1", "agent": " bot ", "agent_status": "working",
            "agent_session": {"kind": "path", "value": "/x/s.jsonl", "agent": "nested"},
            "terminal_title": "hello", "revision": 7}"#,
    );
    assert_eq!(p.agent.as_deref(), Some("bot"));
    assert_eq!(p.agent_session_path.as_deref(), Some("/x/s.jsonl"));
    assert_eq!(p.agent_session_kind.as_deref(), Some("path"));
    assert_eq!(p.revision, Some(7));
    assert!(p.has_agent());
}

#[test]
fn pane_session_jsonl_value_without_kind_is_path() {
    let p = pane(r#"{"pane_id": "p1", "agent_session": {"value": "/logs/a.jsonl"}}"#);
    assert_eq!(p.agent_session_path.as_deref(), Some("/logs/a.jsonl"));
    assert_eq!(p.agent_session_id, None);
    assert_eq!(p.agent_status, "unknown");
    assert!(!p.has_agent());
}

#[test]
fn display_name_truncates_at_40_codepoints() {
    let long = "x".repeat(45);
    let p = pane(&format!(r#"{{"pane_id": "p1", "terminal_title": "{long}"}}"#));
    let name = p.display_name();
    assert_eq!(name.chars().count(), 41);
    assert!(name.ends_with('\u{2026}'));
}

#[test]
fn snapshot_parses_and_unwraps_nested() {
    let result = json(
        r#"{"snapshot": {"panes": [{"pane_id": "p1", "agent_status": "idle"}],
            "tabs": [{"tab_id": "t1", "label": "L"}], "workspaces": [{"workspace_id": "w1"}]}}"#,
    );
    let snap = snapshot_from_session_payload(&result).unwrap();
    assert_eq!(snap.panes.len(), 1);
    assert_eq!(snap.tabs.len(), 1);
    assert_eq!(snap.workspaces.len(), 1);
    assert_eq!(snap.panes[0].pane_id, "p1");
}

#[test]
fn snapshot_non_list_panes_is_none() {
    assert!(snapshot_from_session_payload(&json(r#"{"panes": "nope"}"#)).is_none());
    assert!(snapshot_from_session_payload(&json("[1]")).is_none());
}

#[test]
fn workspace_list_fallback_key() {
    let snap = snapshot_from_session_payload(&json(r#"{"panes": [], "workspace_list": [{"workspace_id": "w9"}]}"#))
        .unwrap();
    assert_eq!(snap.workspaces.len(), 1);
    assert_eq!(snap.workspaces[0].workspace_id, "w9");
}

#[test]
fn snapshot_coerces_fields_leniently() {
    let snap = snapshot_from_session_payload(&json(
        r#"{"panes": [{"pane_id": 12, "focused": 0, "revision": 3.0, "tab_id": true},
                       {"pane_id": ""}, "junk"],
            "tabs": [{"tab_id": "t", "pane_count": " 4 ", "number": 2}, 5],
            "layouts": {}}"#,
    ))
    .unwrap();
    assert_eq!(snap.panes.len(), 1);
    assert_eq!(snap.panes[0].pane_id, "12");
    assert_eq!(snap.panes[0].tab_id, "True");
    assert!(!snap.panes[0].focused);
    assert_eq!(snap.panes[0].revision, None);
    assert_eq!(snap.tabs.len(), 1);
    assert_eq!(snap.tabs[0].pane_count, 4);
    assert_eq!(snap.tabs[0].number, Some(2));
    assert!(matches!(snap.layouts, Json::Object { .. }));
}

#[test]
fn agent_panes_keep_order_and_filter() {
    let snap = empty_snapshot(vec![
        pane(r#"{"pane_id": "a", "agent_status": "unknown"}"#),
        pane(r#"{"pane_id": "b", "agent": "x"}"#),
        pane(r#"{"pane_id": "c", "agent_status": "idle"}"#),
    ]);
    let ids: Vec<&str> = snap.agent_panes().iter().map(|p| p.pane_id.as_str()).collect();
    assert_eq!(ids, vec!["b", "c"]);
}

fn status_pane(status: &str, agent: Option<&str>, title: Option<&str>) -> Pane {
    let mut text = format!(r#"{{"pane_id": "p1", "tab_id": "t1", "agent_status": "{status}""#);
    if let Some(a) = agent {
        text.push_str(&format!(r#", "agent": "{a}""#));
    }
    if let Some(t) = title {
        text.push_str(&format!(r#", "terminal_title": "{t}""#));
    }
    text.push('}');
    pane(&text)
}

#[test]
fn value_joins_agent_status_and_name() {
    let p = status_pane("working", Some("bot"), Some("mytitle"));
    assert_eq!(status_value_for_pane(&p, None, None, None), "bot/working \u{b7} mytitle");
}

#[test]
fn value_dedups_name_against_parts() {
    let tabs = vec![("t1".to_string(), tab_from_raw(&json(r#"{"tab_id": "t1", "label": "same"}"#)))];
    let p = status_pane("idle", Some("a"), Some("same"));
    assert_eq!(status_value_for_pane(&p, Some(&tabs), None, None), "a/idle \u{b7} same");
}

#[test]
fn locked_title_replaces_display_name() {
    let p = status_pane("working", Some("bot"), Some("realtitle"));
    assert_eq!(status_value_for_pane(&p, None, Some("LOCKED"), None), "bot/working \u{b7} LOCKED");
}

#[test]
fn write_payload_carries_style_and_lock() {
    let p = status_pane("blocked", Some("bot"), None);
    let prior = json(r#"{"title_lock": true, "locked_title": "L"}"#);
    let payload = status_write_payload(&p, None, Some(&prior));
    assert_eq!(payload.icon, "exclamationmark.triangle");
    assert_eq!(payload.priority, 90);
    assert!(payload.title_lock);
    assert_eq!(payload.locked_title.as_deref(), Some("L"));
    assert_eq!(payload.value, "bot/blocked \u{b7} L");
    assert_eq!(locked_display_name(Some(&json(r#"{"title_lock": true, "locked_title": "  "}"#))), None);
}

#[test]
fn diff_before_write() {
    let p = status_pane("working", Some("bot"), None);
    let payload = status_write_payload(&p, None, None);
    assert!(should_write_status_pill(&payload, None));
    let same = json(&format!(
        r##"{{"last_status_value": "{}", "last_icon": "hammer", "last_color": "#ff9500", "last_priority": 80}}"##,
        payload.value
    ));
    assert!(!should_write_status_pill(&payload, Some(&same)));
    let diff = json(r##"{"last_status_value": "v2", "last_icon": "hammer", "last_color": "#ff9500", "last_priority": 80}"##);
    assert!(should_write_status_pill(&payload, Some(&diff)));
}

fn rail_pane(id: &str, agent: &str, status: &str) -> Pane {
    pane(&format!(
        r#"{{"pane_id": "{id}", "tab_id": "t1", "workspace_id": "w1", "agent": "{agent}", "agent_status": "{status}", "terminal_title": "{agent}-title"}}"#
    ))
}

#[test]
fn dedupe_keeps_first_status_key_only() {
    let a = rail_pane("p1", "bot", "working");
    let b = rail_pane("p1", "bot", "idle");
    let c = rail_pane("p2", "codex", "blocked");
    let deduped = dedupe_panes_by_status_key(vec![&a, &b, &c]);
    assert_eq!(deduped.len(), 2);
    assert_eq!(deduped[0].pane_id, "p1");
    assert_eq!(deduped[0].agent_status, "working");
    assert_eq!(deduped[1].pane_id, "p2");
}

#[test]
fn rail_payload_uses_herdr_status_keys_and_closed_modes() {
    let snapshot = empty_snapshot(vec![rail_pane("p2", "codex", "done"), rail_pane("p1", "pi", "working")]);
    let agents = rail_agents_from_snapshot(&snapshot);
    assert_eq!(agents.len(), 2);
    assert_eq!(agents[0].status_key, "herdr:p1");
    assert_eq!(agents[1].status_key, "herdr:p2");
    assert_eq!(agents[1].value, "codex/done \u{b7} codex-title");
    assert_eq!(agents[1].icon, "checkmark.circle");
    assert!(dock_actions(&agents).len() >= 3);
    let counts = rail_counts(&agents);
    assert_eq!((counts.working, counts.done, counts.other), (1, 1, 0));
}

#[test]
fn rail_orders_by_workspace_tab_pane_and_falls_back_to_statuses() {
    let snapshot = empty_snapshot(vec![
        pane(r#"{"pane_id": "z", "tab_id": "t1", "workspace_id": "w2", "agent_status": "idle"}"#),
        pane(r#"{"pane_id": "y", "tab_id": "t2", "workspace_id": "w1", "agent_status": "done"}"#),
        pane(r#"{"pane_id": "x", "tab_id": "t2", "workspace_id": "w1", "agent_status": "unknown"}"#),
        pane(r#"{"pane_id": "a", "tab_id": "t1", "workspace_id": "w1", "agent_status": "working"}"#),
    ]);
    let ids: Vec<&str> = agent_panes_for_rail(&snapshot).iter().map(|p| p.pane_id.as_str()).collect();
    assert_eq!(ids, vec!["a", "y", "z"]);
}

fn agent_row(key: &str, status: &str, focused: bool) -> RailAgent {
    RailAgent {
        status_key: format!("herdr:{key}"),
        pane_id: key.into(),
        tab_id: "t1".into(),
        workspace_id: "w1".into(),
        agent: "pi".into(),
        agent_status: status.into(),
        display_name: format!("{key}-name"),
        value: format!("pi/{status}"),
        icon: "hammer".into(),
        priority: 90,
        focused,
    }
}

#[test]
fn feed_events_only_on_blocked_or_done_transitions() {
    let agents = vec![agent_row("p1", "blocked", false), agent_row("p2", "working", false)];
    let previous = json(
        r#"{"agents": [{"status_key": "herdr:p1", "agent_status": "working"},
                       {"status_key": "herdr:p2", "agent_status": "working"}]}"#,
    );
    let events = feed_events_from_transition(Some(&previous), &agents);
    assert_eq!(events.len(), 1);
    assert_eq!(events[0].kind, "herdr.agent.blocked");
    assert_eq!(events[0].from.as_deref(), Some("working"));
    assert_eq!(events[0].title, "pi blocked");
    let again = json(r#"{"agents": [{"status_key": "herdr:p1", "agent_status": "blocked"}]}"#);
    assert!(feed_events_from_transition(Some(&again), &agents).is_empty());
    assert_eq!(feed_events_from_transition(None, &agents).len(), 1);
}

#[test]
fn dock_focuses_the_first_focused_row() {
    let agents = vec![agent_row("p1", "idle", false), agent_row("p2", "idle", true), agent_row("p3", "idle", true)];
    let actions = dock_actions(&agents);
    assert_eq!(actions.len(), 4);
    assert_eq!(actions[3].label, "Focus p2-name");
    assert_eq!(actions[3].cli, "cmux-herdr focus-agent p2");
    assert_eq!(dock_actions(&vec![]).len(), 3);
}

#[test]
fn panes_from_list_drops_idless() {
    let data = json(r#"{"result": {"panes": [{"pane_id": "p1", "tab_id": "t1"}, {"pane_id": "", "tab_id": "t2"}, {"tab_id": "t3"}]}}"#);
    let panes = panes_from_list(&data);
    assert_eq!(panes.len(), 1);
    assert_eq!(panes[0].pane_id, "p1");
}

#[test]
fn panes_from_list_handles_missing_result() {
    assert!(panes_from_list(&json("{}")).is_empty());
    assert!(panes_from_list(&json(r#"{"result": null}"#)).is_empty());
    assert!(panes_from_list(&json(r#"{"result": {"panes": null}}"#)).is_empty());
}

#[test]
fn tabs_from_list_parses() {
    let data = json(r#"{"result": {"tabs": [{"tab_id": "t1", "workspace_id": "w1", "label": "L", "pane_count": 3, "focused": true}]}}"#);
    let tabs = tabs_from_list(&data);
    assert_eq!(tabs.len(), 1);
    assert_eq!(tabs[0].tab_id, "t1");
    assert_eq!(tabs[0].pane_count, 3);
    assert!(tabs[0].focused);
}

#[test]
fn workspaces_from_list_three_shapes() {
    assert_eq!(workspaces_from_list(&json(r#"{"result": {"workspaces": [{"workspace_id": "w1"}]}}"#)).len(), 1);
    assert_eq!(workspaces_from_list(&json(r#"{"result": {"workspace_list": [{"workspace_id": "w2"}]}}"#)).len(), 1);
    assert_eq!(workspaces_from_list(&json(r#"{"result": [{"workspace_id": "w3"}, {"workspace_id": "w4"}]}"#)).len(), 2);
}

#[test]
fn agents_from_list_none_when_empty() {
    assert!(agents_from_list(&json(r#"{"result": {"agents": []}}"#)).is_none());
    assert!(agents_from_list(&json("{}")).is_none());
    let some = agents_from_list(&json(r#"{"result": {"agents": [{"pane_id": "p1"}]}}"#));
    assert_eq!(some.unwrap().len(), 1);
}

#[test]
fn association_key_uses_session() {
    let p = pane(r#"{"pane_id": "p1", "agent_session": {"kind": "id", "value": "s9"}}"#);
    assert_eq!(association_key_for_pane(&p), "p1:s9");
    assert_eq!(association_key_for_pane(&pane(r#"{"pane_id": "p2"}"#)), "p2");
}

#[test]
fn resolve_parents_uses_snapshot_ids() {
    let p = pane(r#"{"pane_id": "p1", "tab_id": "t1", "workspace_id": "w1"}"#);
    let parents = resolve_association_parents(None, None, None, &p, &Json::Null, None);
    assert_eq!(parents.parent_tab_id.as_deref(), Some("t1"));
    assert_eq!(parents.parent_workspace_id.as_deref(), Some("w1"));
    assert!(parents.heuristic_satisfied);
    assert!(!parents.used_heuristic);
}

#[test]
fn resolve_parents_infers_from_env_pane() {
    let p = pane(r#"{"pane_id": "p1"}"#);
    let parents = resolve_association_parents(Some("p1"), Some("envtab"), Some("envws"), &p, &Json::Null, None);
    assert_eq!(parents.parent_tab_id.as_deref(), Some("envtab"));
    assert_eq!(parents.parent_workspace_id.as_deref(), Some("envws"));
    assert!(parents.used_heuristic);
    assert!(parents.heuristic_satisfied);
}

#[test]
fn parents_from_a_satisfied_prior_and_the_only_tab() {
    let p = pane(r#"{"pane_id": "p1", "workspace_id": "w1"}"#);
    let prior = json(r#"{"heuristic_satisfied": true, "parent_tab_id": " tp "}"#);
    let parents = resolve_association_parents(None, None, None, &p, &prior, None);
    assert_eq!(parents.parent_tab_id.as_deref(), Some("tp"));
    assert!(!parents.used_heuristic);
    let snap = Snapshot {
        panes: vec![],
        tabs: vec![
            tab_from_raw(&json(r#"{"tab_id": "t9", "workspace_id": "w1"}"#)),
            tab_from_raw(&json(r#"{"tab_id": "t8", "workspace_id": "w2"}"#)),
        ],
        workspaces: vec![],
        layouts: Json::Null,
    };
    assert_eq!(infer_parent_once(None, None, None, &p, Some(&snap)), (Some("t9".to_string()), Some("w1".to_string())));
}

#[test]
fn prior_for_pane_drops_on_session_change() {
    let previous = json(r#"{"p1": {"agent_session_id": "old", "title_lock": true}}"#);
    let p = pane(r#"{"pane_id": "p1", "agent_session": {"kind": "id", "value": "new"}}"#);
    assert!(prior_for_pane(&p, &previous).is_none());
    let same = pane(r#"{"pane_id": "p1", "agent_session": {"kind": "id", "value": "old"}}"#);
    assert!(prior_for_pane(&same, &previous).is_some());
}

#[test]
fn nested_envelopes_are_classified_from_the_body() {
    let event = json(r#"{"event": "pane.focused", "data": {"pane_id": "p"}}"#);
    assert_eq!(classify_event(Some(&event)), "focus");
    assert_eq!(event_string(event_body(Some(&event)).unwrap(), &vec!["pane_id"]), "p");
}

#[test]
fn event_types_and_nested_strings() {
    assert_eq!(event_type(Some(&json(r#"{"params": {"type": "tab.closed"}}"#))), "tab.closed");
    assert_eq!(classify_event(Some(&json(r#"{"type": "layout.changed"}"#))), "topology");
    assert_eq!(classify_event(Some(&json(r#"{"name": "pane.agent_detected"}"#))), "status");
    assert_eq!(classify_event(None), "other");
    let body = json(r#"{"cwd": " ", "pane": {"cwd": " /w "}}"#);
    assert_eq!(event_string(&body, &vec!["foreground_cwd", "cwd"]), "/w");
}

fn ws(label: Option<&str>) -> Workspace {
    Workspace {
        workspace_id: "ws-a".into(),
        label: label.map(|l| l.to_string()),
        number: None,
        agent_status: "idle".into(),
        focused: false,
        pane_count: 1,
        tab_count: 1,
        raw: Json::Null,
    }
}

#[test]
fn display_name_prefers_label() {
    assert_eq!(display_name(&ws(Some("Alpha"))), "Alpha");
    assert_eq!(display_name(&ws(None)), "ws-a");
    assert_eq!(display_name(&ws(Some("  "))), "ws-a");
}

#[test]
fn extract_id_reads_nested_and_top_level() {
    assert_eq!(extract_id(&json(r#"{"group":{"id":"g1"}}"#), "group", &vec!["id", "group_id"]).as_deref(), Some("g1"));
    assert_eq!(
        extract_id(&json(r#"{"workspace_id":"w9"}"#), "workspace", &vec!["workspace_id", "id"]).as_deref(),
        Some("w9")
    );
}

#[test]
fn nest_decisions_reuse_rename_and_create() {
    let prior = json(r#"{"cmux_workspace_id": " c1 ", "title": "Old"}"#);
    match nest_decision(&ws(Some("Alpha")), Some(&prior)) {
        NestDecision::Reuse { herdr_id, cmux_id, title, rename } => {
            assert_eq!((herdr_id.as_str(), cmux_id.as_str(), title.as_str(), rename), ("ws-a", "c1", "Alpha", true));
        }
        other => panic!("unexpected {:?}", other),
    }
    assert!(matches!(nest_decision(&ws(None), None), NestDecision::Create { .. }));
}

#[test]
fn sessions_and_restore_path_from_snapshot() {
    let snap = snapshot_from_session_payload(&json(
        r#"{"panes": [], "tabs": [{"tab_id": "t"}], "workspaces": [{"workspace_id": "", "label": "L", "tab_count": 2}]}"#,
    ))
    .unwrap();
    let sessions = sessions_from_snapshot(&snap);
    assert_eq!(sessions.len(), 1);
    assert_eq!((sessions[0].session_id.as_str(), sessions[0].name.as_str(), sessions[0].window_count), ("main", "L", 2));
    let bare = sessions_from_snapshot(&Snapshot { panes: vec![], tabs: snap.tabs, workspaces: vec![], layouts: Json::Null });
    assert_eq!((bare[0].session_id.as_str(), bare[0].window_count), ("main", 1));
    assert_eq!(
        restore_record_path("/tmp/herdr.sock", &vec!["/state".to_string()]),
        "/state/restore-0cb0c5e4a7465217.json"
    );
    assert_eq!(restore_record_path("/tmp/herdr.sock", &vec![]), "");
}

#[test]
fn tree_orders_numbered_tabs_and_focused_panes_first() {
    let snap = snapshot_from_session_payload(&json(
        r#"{"workspaces": [{"workspace_id": "w1", "label": "Main", "agent_status": "idle", "focused": true, "pane_count": 2}],
            "tabs": [{"tab_id": "t2", "workspace_id": "w1", "number": 2, "agent_status": "working"},
                     {"tab_id": "tx", "workspace_id": "w1"},
                     {"tab_id": "t1", "workspace_id": "w1", "number": 1, "label": "One"},
                     {"tab_id": "t1", "workspace_id": "w1", "number": 1}],
            "panes": [{"pane_id": "p2", "tab_id": "t1", "agent": "bot"},
                      {"pane_id": "p1", "tab_id": "t1", "focused": true, "label": "L"}]}"#,
    ))
    .unwrap();
    let expected = [
        "\u{25cf} workspace w1  Main  [idle] tabs=4 panes=2",
        "  \u{b7} tab t1  One  [unknown] panes=2",
        "    \u{25b6} pane p1  L  [unknown]  -",
        "    \u{b7} pane p2  p2  [unknown]  bot",
        "  \u{b7} tab t2  t2  [working] panes=0",
        "  \u{b7} tab tx  tx  [unknown] panes=0",
    ]
    .join("\n");
    assert_eq!(format_tree(&snap), expected);
    let none = Snapshot { panes: vec![], tabs: vec![], workspaces: vec![], layouts: Json::Null };
    assert_eq!(format_tree(&none), "(no herdr workspaces/panes)");
}


#[test]
fn update_association_map_prunes_missing() {
    let snap1 = empty_snapshot(vec![
        pane(r#"{"pane_id": "p1", "tab_id": "t1", "workspace_id": "w1"}"#),
        pane(r#"{"pane_id": "p2", "tab_id": "t1", "workspace_id": "w1"}"#),
    ]);
    let out1 = update_association_map(&Json::Null, &snap1, Some("cws"), None, None, None, None);
    assert_eq!(out1.panes.len(), 2);
    assert_eq!(out1.panes[0].pane_id, "p1");
    assert_eq!(out1.panes[1].pane_id, "p2");
    assert!(out1.pruned.is_empty());
    assert!(matches!(&out1.cmux_workspace, Json::Str(w) if w == "cws"));
    let state = json(
        r#"{"cmux_workspace": "cws", "panes": {
            "p1": {"pane_id": "p1", "first_seen_at": 5, "title_lock": true, "locked_title": "Mine"},
            "p2": {"pane_id": "p2"}}}"#,
    );
    let snap2 = empty_snapshot(vec![pane(r#"{"pane_id": "p1", "tab_id": "t1", "workspace_id": "w1"}"#)]);
    let out2 = update_association_map(&state, &snap2, None, None, None, None, None);
    assert_eq!(out2.panes.len(), 1);
    assert_eq!(out2.pruned, vec!["p2"]);
    assert!(matches!(&out2.cmux_workspace, Json::Str(w) if w == "cws"));
    let record = &out2.panes[0];
    assert!(record.title_lock);
    assert!(matches!(&record.locked_title, Json::Str(t) if t == "Mine"));
    assert!(matches!(&record.first_seen_at, Some(Json::Number { text, .. }) if text == "5"));
    assert!(matches!(&record.parent_tab_id, Json::Str(t) if t == "t1"));
}

#[test]
fn update_keeps_the_last_pane_per_id_and_applies_metadata() {
    let snap = empty_snapshot(vec![
        pane(r#"{"pane_id": "b", "tab_id": "t1", "workspace_id": "w1", "agent_status": "idle"}"#),
        pane(r#"{"pane_id": "a", "tab_id": "t1", "workspace_id": "w1"}"#),
        pane(r#"{"pane_id": "b", "tab_id": "t2", "workspace_id": "w1", "agent_status": "working"}"#),
        pane(r#"{"pane_id": "", "tab_id": "t3"}"#),
    ]);
    let meta = json(r#"{"a": {"parent_tab_id": "outer", "heuristic_satisfied": false, "last_icon": "x"}}"#);
    let out = update_association_map(&Json::Null, &snap, None, Some(&meta), None, None, None);
    let ids: Vec<_> = out.panes.iter().map(|r| r.pane_id.as_str()).collect();
    assert_eq!(ids, vec!["a", "b"]);
    assert_eq!(out.panes[1].agent_status, "working");
    assert!(matches!(&out.panes[0].parent_tab_id, Json::Str(t) if t == "outer"));
    assert!(!out.panes[0].heuristic_satisfied);
    assert!(matches!(&out.panes[0].last_icon, Json::Str(t) if t == "x"));
    assert!(out.panes[1].heuristic_satisfied);
    assert!(matches!(out.cmux_workspace, Json::Null));
}

#[test]
fn title_lock_roundtrip_via_files() {
    let change = title_lock_change(&Json::Null, " p1 ", true, Some("LockedTitle")).unwrap();
    assert_eq!(change.pane_id, "p1");
    assert!(change.base.is_none());
    assert!(change.title_lock);
    assert!(matches!(&change.locked_title, Some(Json::Str(t)) if t == "LockedTitle"));
    let state = json(r#"{"panes": {"p1": {"pane_id": "p1", "title_lock": true, "locked_title": "LockedTitle"}}}"#);
    let clear = title_lock_change(&state, "p1", false, None).unwrap();
    assert!(!clear.title_lock);
    assert!(clear.locked_title.is_none());
    assert!(clear.base.is_some());
    let keep = title_lock_change(&state, "p1", true, None).unwrap();
    assert!(keep.locked_title.is_none());
    let labelled = json(r#"{"panes": {"p2": {"label": "Docs"}}}"#);
    let from_label = title_lock_change(&labelled, "p2", true, Some("   ")).unwrap();
    assert!(matches!(&from_label.locked_title, Some(Json::Str(t)) if t == "Docs"));
    assert_eq!(
        title_lock_change(&state, "  ", true, None).unwrap_err(),
        "pane_id is required to lock or unlock a title"
    );
}

#[test]
fn association_summary_lists_panes_and_mirrors() {
    let data = json(
        r#"{"panes": {"p2": {"agent_status": "idle", "agent": "pi", "status_key": "herdr:p2", "tab_id": "t9",
                             "title_lock": true},
                      "p1": {}},
            "mirrors": {"p1": {"role": "tab-root", "cmux_surface_id": "S1", "title": "one"}},
            "cmux_workspace": "cws", "herdr_server_pid": 42}"#,
    );
    let text = format_associations(&data, "KEY", "/state/a.json");
    let lines: Vec<_> = text.lines().collect();
    assert_eq!(lines[0], "associations: 2 panes, 1 mirrored surfaces");
    assert_eq!(lines[1], "  cmux_workspace=cws");
    assert_eq!(lines[2], "  herdr_workspace=-");
    assert_eq!(lines[4], "  herdr_pid=42");
    assert_eq!(lines[5], "  fingerprint=KEY");
    assert_eq!(lines[6], "  file=/state/a.json");
    assert_eq!(lines[7], "  p1          ?         -         -  parent=-  lock=n  heur=n  session=-");
    assert_eq!(lines[8], "  p2          idle      pi        herdr:p2  parent=t9  lock=Y  heur=n  session=-");
    assert_eq!(lines[9], "mirrors:");
    assert_eq!(lines[10], "  p1          tab-root  S1  one");
}
