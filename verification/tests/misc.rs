use cmux_herdr::nest::parse_ok_id;
use cmux_herdr::session::{FakeSessionHost, SessionAction};
use cmux_herdr::socket::default_subscriptions;
use cmux_herdr::state::{parent_key, Fingerprint};
use cmux_herdr::status::{default_style, map_status_to_style};

#[test]
fn parse_ok_id_reads_cli_line() {
    assert_eq!(parse_ok_id("OK workspace:abc\n").as_deref(), Some("workspace:abc"));
    assert_eq!(parse_ok_id("noise\n").as_deref(), None);
}

#[test]
fn unknown_action_fails_closed() {
    let mut host = FakeSessionHost::default();
    assert!(host.apply(&[SessionAction::new("explode")]).is_err());
}

#[test]
fn unknown_action_leaves_host_unchanged() {
    let mut host = FakeSessionHost::default();
    assert_eq!(host.apply(&[SessionAction::new("explode")]), Err("unknown session op explode".to_string()));
    assert_eq!(host, FakeSessionHost::default());
}

#[test]
fn session_host_applies_create_rename_focus_and_stops_at_failure() {
    let mut host = FakeSessionHost::default();
    let mut create = SessionAction::new("create_tab");
    create.tab_id = Some("t1".to_string());
    let mut rename = SessionAction::new("rename_tab");
    rename.tab_id = Some("t1".to_string());
    rename.title = Some("Build".to_string());
    let mut focus_missing = SessionAction::new("focus_tab");
    focus_missing.tab_id = Some("t9".to_string());
    let mut close_defaults = SessionAction::new("close_default_tabs");
    close_defaults.tab_id = None;
    let r = host.apply(&[create, rename, focus_missing, close_defaults]);
    assert_eq!(r, Err("focus_tab missing tab t9".to_string()));
    assert_eq!(host.tabs, vec!["t1".to_string()]);
    assert_eq!(host.titles, vec![("t1".to_string(), "Build".to_string())]);
    assert_eq!(host.mirrors, vec![("t1".to_string(), true)]);
    assert_eq!(host.log, vec!["create:t1".to_string(), "rename:t1".to_string()]);
    assert_eq!(host.default_tabs, vec!["default".to_string()]);
    assert!(!host.defaults_closed);
    let mut no_id = SessionAction::new("create_tab");
    no_id.tab_id = Some(String::new());
    assert_eq!(host.apply(&[no_id]), Err("create_tab requires tab_id".to_string()));
}

#[test]
fn default_subscriptions_locked() {
    let subs = default_subscriptions();
    assert_eq!(subs.len(), 24);
    assert_eq!(subs[0], "workspace.created");
    assert_eq!(subs[13], "pane.created");
    assert_eq!(subs[23], "layout.changed");
}

#[test]
fn parent_key_is_stable_and_slugged() {
    let fp = Fingerprint {
        cmux_surface_id: Some("my/surface id".into()),
        herdr_socket_path: Some("/tmp/h.sock".into()),
        herdr_server_pid: Some(42),
        herdr_workspace_id: Some("ws1".into()),
    };
    let k = parent_key(&fp);
    assert!(k.starts_with("my_surface_id-"));
    let digest = k.rsplit('-').next().unwrap();
    assert_eq!(digest.len(), 16);
    assert!(digest.chars().all(|c| c.is_ascii_hexdigit()));
    assert_eq!(k, parent_key(&fp));
}

#[test]
fn parent_key_defaults_for_missing_fields() {
    let fp = Fingerprint::default();
    let k = parent_key(&fp);
    assert!(k.starts_with("_nosurface_-"));
}

#[test]
fn style_map_exact_and_case_insensitive() {
    assert_eq!(map_status_to_style(Some("working")).icon, "hammer");
    assert_eq!(map_status_to_style(Some("WORKING")).priority, 80);
    assert_eq!(map_status_to_style(Some("Done")).icon, "checkmark.circle");
    assert_eq!(map_status_to_style(Some("blocked")).color, "#ff3b30");
    assert_eq!(map_status_to_style(None).icon, "questionmark.circle");
    assert_eq!(map_status_to_style(Some("weird")), default_style());
}
