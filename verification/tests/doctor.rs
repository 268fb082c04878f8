use cmux_herdr::doctor::{dry_sync_preview, dry_sync_skip_reason, install_report, InstallProbes};
use cmux_herdr::model::Pane;
use cmux_herdr::json::Json;
use cmux_herdr::state::{parent_binding_workspace, parent_key, Fingerprint};

fn obj(entries: Vec<(&str, Json)>) -> Json {
    Json::Object { entries: entries.into_iter().map(|(k, v)| (k.to_string(), v)).collect(), text: String::new() }
}

fn probes() -> InstallProbes {
    InstallProbes {
        herdr_path: Some("/usr/bin/herdr".to_string()),
        herdr_version: Some("herdr 0.5.1".to_string()),
        socket_path: "/run/h.sock".to_string(),
        socket_from_env: true,
        socket_exists: true,
        socket_mode: Some("0600".to_string()),
        socket_owner: None,
        ping: Ok((true, "socket".to_string())),
        fingerprint: Fingerprint {
            cmux_surface_id: Some("surf".to_string()),
            herdr_socket_path: Some("/run/h.sock".to_string()),
            herdr_server_pid: Some(7),
            herdr_workspace_id: None,
        },
        claiming_nested: true,
        state_dir: "/state".to_string(),
        state_dir_exists: true,
        binding_exists: true,
        bound_workspace: Some("w1".to_string()),
        writer_native_live: true,
        writer_force_plugin: false,
        writer_native_detected: true,
        writer_marker: None,
        size_env: Some("  native:12 ".to_string()),
        size_file: Some("p9".to_string()),
        association: obj(vec![(
            "panes",
            obj(vec![
                ("p1", obj(vec![("title_lock", Json::Bool(true))])),
                ("p2", obj(vec![("title_lock", Json::Bool(false))])),
                ("p3", obj(vec![("title_lock", Json::Bool(true))])),
            ]),
        )]),
        launch_skipped: false,
        launch_loaded: false,
        launch_label: None,
        launch_reason: None,
        sidebar_path: "/opt/sidebar.py".to_string(),
        sidebar_exists: false,
        dry_sync_skipped: false,
        dry_sync_summary: Some("would mirror 3 panes".to_string()),
        dry_sync_reasons: vec![],
    }
}

#[test]
fn install_report_details_each_check() {
    let p = probes();
    let r = install_report(&p);
    assert!(r.ok);
    assert!(r.hard_failures.is_empty());
    let details: Vec<(&str, bool, bool, &str)> =
        r.checks.iter().map(|c| (c.name.as_str(), c.ok, c.hard, c.detail.as_str())).collect();
    let key = parent_key(&p.fingerprint);
    let fp_detail = format!("complete key={key}");
    assert_eq!(
        details,
        vec![
            ("herdr_cli", true, true, "herdr on PATH (herdr 0.5.1)"),
            ("herdr_socket", true, false, "socket /run/h.sock exists mode=0600 owner=-"),
            ("herdr_api", true, false, "ping via socket"),
            ("host_fingerprint", true, false, fp_detail.as_str()),
            ("state_binding", true, false, "state=/state exists=true; matching parent binding=yes (w1)"),
            ("writer", true, false, "writer=native (plugin projection skipped); marker=-"),
            ("size_authority", true, false, "size-authority=native (plugin SIGWINCH no-op); value=native:12"),
            ("title_locks", true, false, "title locks=2 (p1, p3)"),
            ("launch_agent", false, false, "LaunchAgent com.cmux-herdr.watch: not loaded"),
            ("sidebar", true, false, "sidebar absent (optional): /opt/sidebar.py"),
            ("dry_sync", true, false, "would mirror 3 panes"),
        ]
    );
    assert_eq!(r.locked_count, 2);
    assert_eq!(r.locked_panes, vec!["p1".to_string(), "p3".to_string()]);
}

#[test]
fn install_report_hard_failures_without_herdr_or_fingerprint() {
    let mut p = probes();
    p.herdr_path = None;
    p.fingerprint.herdr_socket_path = None;
    p.fingerprint.cmux_surface_id = None;
    p.socket_exists = false;
    p.ping = Err("connection refused".to_string());
    p.size_env = Some("   ".to_string());
    p.launch_skipped = true;
    p.launch_label = Some("svc".to_string());
    p.dry_sync_skipped = true;
    p.dry_sync_reasons = vec![];
    let r = install_report(&p);
    assert!(!r.ok);
    assert_eq!(
        r.hard_failures,
        vec![
            "herdr not found on PATH".to_string(),
            "incomplete host fingerprint while HERDR_ENV claims nested env (missing CMUX_SURFACE_ID, HERDR_SOCKET_PATH)"
                .to_string(),
        ]
    );
    let d: Vec<&str> = r.checks.iter().map(|c| c.detail.as_str()).collect();
    assert_eq!(d[0], "herdr not found on PATH");
    assert_eq!(d[1], "HERDR_SOCKET_PATH set but missing: /run/h.sock");
    assert_eq!(d[2], "ping failed: connection refused");
    assert_eq!(
        d[3],
        "incomplete (missing CMUX_SURFACE_ID, HERDR_SOCKET_PATH); hard fail because HERDR_ENV claims nested context"
    );
    assert!(r.checks[3].hard && !r.checks[3].ok);
    assert_eq!(d[4], "state=/state exists=true; binding check skipped (incomplete fingerprint)");
    assert_eq!(d[6], "size-authority unset (first attach may claim)");
    assert_eq!(d[7], "title locks=0");
    assert_eq!(d[8], "LaunchAgent svc: skipped (unknown reason)");
    assert!(r.checks[8].ok);
    assert_eq!(d[10], "dry sync skipped: unknown");
    assert!(r.checks[10].ok);
    assert_eq!(r.locked_count, 0);
}

#[test]
fn install_report_lists_five_locks_then_an_ellipsis() {
    let mut p = probes();
    let panes: Vec<(String, Json)> =
        (1..=7).map(|i| (format!("p{i}"), obj(vec![("title_lock", Json::Bool(true))]))).collect();
    p.association = obj(vec![("panes", Json::Object { entries: panes, text: String::new() })]);
    p.size_env = None;
    p.dry_sync_skipped = true;
    p.dry_sync_reasons = vec!["no herdr".to_string(), "no socket".to_string()];
    let r = install_report(&p);
    assert_eq!(r.checks[7].detail, "title locks=7 (p1, p2, p3, p4, p5…)");
    assert_eq!(r.checks[6].detail, "size-authority pane=p9");
    assert_eq!(r.checks[10].detail, "dry sync skipped: no herdr; no socket");
    assert!(!r.checks[10].ok);
    assert_eq!(r.locked_count, 7);
}

fn pane(id: &str, agent: Option<&str>, status: &str) -> Pane {
    Pane {
        pane_id: id.to_string(),
        tab_id: "t".to_string(),
        workspace_id: "w".to_string(),
        agent: agent.map(str::to_string),
        agent_status: status.to_string(),
        label: None,
        cwd: None,
        focused: false,
        terminal_title: None,
        agent_session_path: None,
        agent_session_id: None,
        agent_session_kind: None,
        revision: None,
        raw: Json::Null,
    }
}

#[test]
fn dry_sync_counts_named_agents_first() {
    let panes = vec![
        pane("1", Some("goose"), "Working"),
        pane("2", Some(""), "idle"),
        pane("3", None, "blocked"),
        pane("4", Some("pi"), "asleep"),
    ];
    let d = dry_sync_preview(&panes, Some("workspace:7"));
    assert_eq!((d.pane_count, d.agent_count), (4, 2));
    assert_eq!((d.working, d.idle, d.done, d.blocked, d.unknown), (1, 0, 0, 0, 1));
    assert_eq!(d.summary, "dry sync: 2 agent panes (working=1 idle=0 done=0 blocked=0) → ws=workspace:7");
}

#[test]
fn dry_sync_falls_back_to_known_states() {
    let panes = vec![pane("1", None, "idle"), pane("2", None, "Done"), pane("3", None, "blocked")];
    let d = dry_sync_preview(&panes, None);
    assert_eq!(d.agent_count, 2);
    assert_eq!((d.idle, d.blocked, d.done), (1, 1, 0));
    assert_eq!(d.summary, "dry sync: 2 agent panes (working=0 idle=1 done=0 blocked=1)");
}

#[test]
fn dry_sync_skip_reasons() {
    assert_eq!(dry_sync_skip_reason(false, None, false, "/d.sock", false), "herdr not on PATH");
    assert_eq!(
        dry_sync_skip_reason(true, Some("/e.sock"), false, "/d.sock", true),
        "HERDR_SOCKET_PATH missing on disk: /e.sock"
    );
    assert_eq!(
        dry_sync_skip_reason(true, None, false, "/d.sock", false),
        "no HERDR_SOCKET_PATH and default socket absent (/d.sock)"
    );
    assert_eq!(
        dry_sync_skip_reason(true, None, false, "/d.sock", true),
        "herdr status probe failed / socket unhealthy"
    );
}

fn num(n: i64) -> Json {
    Json::Number { text: n.to_string(), whole: Some(n), trunc: n }
}

#[test]
fn parent_binding_must_match_the_fingerprint() {
    let fp = Fingerprint {
        cmux_surface_id: Some("s1".to_string()),
        herdr_socket_path: None,
        herdr_server_pid: Some(42),
        herdr_workspace_id: Some("w1".to_string()),
    };
    let good = obj(vec![
        ("cmux_surface_id", Json::Str("s1".to_string())),
        ("herdr_socket_path", Json::Null),
        ("herdr_workspace_id", Json::Str("w1".to_string())),
        ("herdr_server_pid", num(42)),
        ("workspace_ref", Json::Str("workspace:3".to_string())),
    ]);
    assert_eq!(parent_binding_workspace(&good, &fp).as_deref(), Some("workspace:3"));
    let other_pid = obj(vec![
        ("cmux_surface_id", Json::Str("s1".to_string())),
        ("herdr_socket_path", Json::Null),
        ("herdr_server_pid", num(7)),
        ("workspace_ref", Json::Str("workspace:3".to_string())),
    ]);
    assert_eq!(parent_binding_workspace(&other_pid, &fp), None);
    let no_socket_key = obj(vec![
        ("cmux_surface_id", Json::Str("s1".to_string())),
        ("workspace_ref", Json::Str("workspace:3".to_string())),
    ]);
    assert_eq!(parent_binding_workspace(&no_socket_key, &fp), None);
    let empty_ws = obj(vec![
        ("cmux_surface_id", Json::Str("s1".to_string())),
        ("herdr_socket_path", Json::Null),
        ("herdr_workspace_id", Json::Str(String::new())),
        ("workspace_ref", Json::Str(String::new())),
    ]);
    assert_eq!(parent_binding_workspace(&empty_ws, &fp), None);
}
