use cmux_herdr::json::Json;
use cmux_herdr::layout::{LayoutNode, LayoutRect, Ratio};
use cmux_herdr::mirror::{
    mirror_groups, mirror_key_for_pane, plan_mirror, tab_mirrors, DesiredMirror, MirrorAction, MirrorPlan,
};
use cmux_herdr::model::{snapshot_from_session_payload, Snapshot};
use serde_json::Value;

fn conv(v: &Value) -> Json {
    match v {
        Value::Null => Json::Null,
        Value::Bool(b) => Json::Bool(*b),
        Value::Number(n) => {
            let whole = n.as_i64().or_else(|| {
                n.as_f64()
                    .filter(|f| f.fract() == 0.0 && *f >= -9223372036854775808.0 && *f < 9223372036854775808.0)
                    .map(|f| f as i64)
            });
            let trunc = n.as_i64().unwrap_or_else(|| n.as_f64().unwrap_or(0.0) as i64);
            Json::Number { text: n.to_string(), whole, trunc }
        }
        Value::String(s) => Json::Str(s.clone()),
        Value::Array(items) => Json::Array { items: items.iter().map(conv).collect(), text: v.to_string() },
        Value::Object(map) => Json::Object {
            entries: map.iter().map(|(k, x)| (k.clone(), conv(x))).collect(),
            text: v.to_string(),
        },
    }
}

fn json(text: &str) -> Json {
    conv(&serde_json::from_str::<Value>(text).unwrap())
}

fn snapshot(text: &str) -> Snapshot {
    snapshot_from_session_payload(&json(text)).unwrap()
}

fn action(op: &str, pane: &str) -> MirrorAction {
    MirrorAction {
        op: op.into(),
        pane_id: pane.into(),
        title: "t".into(),
        tab_id: "t".into(),
        role: "split".into(),
        split_direction: "right".into(),
        key: mirror_key_for_pane(pane),
        surface_id: None,
        split_from_surface_id: None,
        split_from_pane_id: None,
        ratio: None,
        tab_index: None,
        reason: String::new(),
    }
}

fn desired_all(snap: &Snapshot, layouts: &[(&str, LayoutNode)]) -> Vec<DesiredMirror> {
    let groups = mirror_groups(snap, "all", None, None, None, None).unwrap();
    let zoomed = vec![false; snap.panes.len()];
    let mut out = Vec::new();
    for (index, group) in groups.iter().enumerate() {
        let layout = layouts.iter().find(|(tab, _)| *tab == group.tab_id).map(|(_, n)| n);
        out.extend(tab_mirrors(snap, index, group, layout, &zoomed));
    }
    out
}

#[test]
fn plan_views_preserve_action_order() {
    let plan = MirrorPlan {
        actions: vec![action("create_tab", "p1"), action("keep", "p3"), action("create_split", "p2")],
        ..MirrorPlan::default()
    };
    assert_eq!(plan.creates().iter().map(|a| a.pane_id.as_str()).collect::<Vec<_>>(), vec!["p1", "p2"]);
    assert_eq!(plan.keeps().len(), 1);
    assert_eq!(plan.scope, "current-tab");
}

#[test]
fn desired_titles_truncate_by_unicode_scalar() {
    let title = "é".repeat(81);
    let snap = snapshot(&format!(
        r#"{{"panes": [{{"pane_id": "p", "tab_id": "t", "workspace_id": "w"}}],
            "tabs": [{{"tab_id": "t", "workspace_id": "w", "label": "{title}"}}]}}"#
    ));
    let desired = desired_all(&snap, &[]);
    assert_eq!(desired[0].title.chars().count(), 80);
    assert!(desired[0].title.chars().all(|c| c == 'é'));
}

#[test]
fn prune_order_is_sorted_not_map_insertion_order() {
    let existing = Json::Object {
        entries: vec![
            ("z".into(), json(r#"{"cmux_surface_id": "sz"}"#)),
            ("a".into(), json(r#"{"cmux_surface_id": "sa"}"#)),
        ],
        text: String::new(),
    };
    let plan = plan_mirror(&vec![], &existing, None, true, false, false, false, None, &vec![]);
    assert_eq!(plan.prunes().iter().map(|a| a.pane_id.as_str()).collect::<Vec<_>>(), vec!["a", "z"]);
    assert_eq!(plan.actions[0].surface_id.as_deref(), Some("sa"));
    assert_eq!(plan.actions[0].key, "herdr-mirror:a");
    assert_eq!(plan.actions[0].reason, "herdr pane gone");
}

#[test]
fn groups_follow_tab_numbers_and_scope() {
    let snap = snapshot(
        r#"{"panes": [
            {"pane_id": "p1", "tab_id": "t2", "workspace_id": "w"},
            {"pane_id": "p2", "tab_id": "t1", "workspace_id": "w"},
            {"pane_id": "p3", "tab_id": "t2", "workspace_id": "x"},
            {"pane_id": "solo", "workspace_id": "w"}],
           "tabs": [{"tab_id": "t1", "number": 2}, {"tab_id": "t2", "number": 1}]}"#,
    );
    let groups = mirror_groups(&snap, "all", None, None, None, None).unwrap();
    let ids: Vec<_> = groups.iter().map(|g| g.tab_id.as_str()).collect();
    assert_eq!(ids, vec!["t2", "t1", "solo"]);
    assert_eq!(groups[0].members, vec![0, 2]);
    let ws = mirror_groups(&snap, "workspace", None, None, None, Some("x")).unwrap();
    assert_eq!(ws.len(), 1);
    assert_eq!(ws[0].members, vec![2]);
    assert_eq!(
        mirror_groups(&snap, "bogus", None, None, None, None).unwrap_err().0,
        "scope must be current-tab, workspace, or all"
    );
    assert!(mirror_groups(&snap, "current-tab", Some(""), None, None, None).is_err());
    let tab = mirror_groups(&snap, "current-tab", None, None, Some("t1"), None).unwrap();
    assert_eq!(tab[0].members, vec![1]);
}

#[test]
fn layout_orders_members_and_supplies_splits() {
    let snap = snapshot(
        r#"{"panes": [
            {"pane_id": "b", "tab_id": "t", "workspace_id": "w", "agent": "goose"},
            {"pane_id": "a", "tab_id": "t", "workspace_id": "w", "focused": true}],
           "tabs": [{"tab_id": "t", "label": "Main"}]}"#,
    );
    let layout = LayoutNode {
        kind: "horizontal".into(),
        pane_id: None,
        children: vec![
            LayoutNode { kind: "pane".into(), pane_id: Some("a".into()), children: vec![], rect: LayoutRect { x: 0, y: 0, width: 40, height: 10 } },
            LayoutNode { kind: "pane".into(), pane_id: Some("b".into()), children: vec![], rect: LayoutRect { x: 41, y: 0, width: 39, height: 10 } },
        ],
        rect: LayoutRect { x: 0, y: 0, width: 80, height: 10 },
    };
    let desired = desired_all(&snap, &[("t", layout)]);
    assert_eq!(desired.len(), 2);
    assert_eq!(desired[0].pane_id, "a");
    assert_eq!(desired[0].role, "tab-root");
    assert_eq!(desired[0].title, "Main");
    assert_eq!(desired[0].agent_status, "unknown");
    assert_eq!(desired[1].pane_id, "b");
    assert_eq!(desired[1].role, "split");
    assert_eq!(desired[1].title, "goose@b");
    assert_eq!(desired[1].split_direction, "right");
    assert_eq!(desired[1].split_from_pane_id.as_deref(), Some("a"));
    assert_eq!(desired[1].split_ratio, Some(Ratio { num: 40, den: 80 }));
    assert_eq!(desired[1].tab_index, Some(0));
    assert!(desired.iter().all(|d| d.visible && !d.zoomed));
}

#[test]
fn unplaced_members_put_focused_first_and_alternate_directions() {
    let snap = snapshot(
        r#"{"panes": [
            {"pane_id": "c", "tab_id": "t"},
            {"pane_id": "b", "tab_id": "t", "focused": true},
            {"pane_id": "a", "tab_id": "t"}]}"#,
    );
    let groups = mirror_groups(&snap, "all", None, None, None, None).unwrap();
    let zoomed = vec![false, false, true];
    let desired = tab_mirrors(&snap, 3, &groups[0], None, &zoomed);
    let ids: Vec<_> = desired.iter().map(|d| d.pane_id.as_str()).collect();
    assert_eq!(ids, vec!["b", "a", "c"]);
    assert_eq!(desired[1].split_direction, "right");
    assert_eq!(desired[2].split_direction, "down");
    assert!(desired[1].zoomed && desired[1].visible);
    assert!(!desired[0].visible);
    assert_eq!(desired[0].tab_index, Some(3));
}

#[test]
fn plan_keeps_renames_creates_and_focuses() {
    let snap = snapshot(
        r#"{"panes": [
            {"pane_id": "r", "tab_id": "t", "label": "root", "focused": true},
            {"pane_id": "s", "tab_id": "t", "label": "side"}],
           "tabs": [{"tab_id": "t"}]}"#,
    );
    let desired = desired_all(&snap, &[]);
    let existing = json(
        r#"{"r": {"cmux_surface_id": "S1", "title": "old", "tab_index": 0},
            "x": {"cmux_surface_id": "S9", "title": "gone"}}"#,
    );
    let same = vec![false; desired.len()];
    let plan = plan_mirror(&desired, &existing, None, true, true, true, false, None, &same);
    let ops: Vec<_> = plan.actions.iter().map(|a| (a.op.as_str(), a.pane_id.as_str())).collect();
    assert_eq!(ops, vec![("rename", "r"), ("create_split", "s"), ("prune", "x"), ("focus", "r")]);
    assert_eq!(plan.actions[1].split_from_surface_id.as_deref(), Some("S1"));
    assert_eq!(plan.actions[2].title, "gone");
    assert_eq!(plan.desired_count, 2);
    let live = vec!["other".to_string()];
    let dead = plan_mirror(&desired, &existing, Some(&live), false, false, false, false, None, &same);
    let ops: Vec<_> = dead.actions.iter().map(|a| a.op.as_str()).collect();
    assert_eq!(ops, vec!["create_tab", "create_split"]);
}
