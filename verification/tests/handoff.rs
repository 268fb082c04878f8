use cmux_herdr::handoff::{
    candidate_paths, claim_native_allowed, claim_plugin_plan, heartbeat_native_plan,
    heartbeat_plugin_plan, legacy_native_marker_path, parse_lease_ttl, pick_lease,
    plugin_marker_path, resolve_writer, restore_paths, truthy_flag, writer_paths, HeartbeatPlan,
    WriterLease, DEFAULT_TTL_MS, SCHEMA,
};

fn lease(owner: &str, pid: i64, heartbeat_ms: i64) -> WriterLease {
    WriterLease {
        owner: owner.into(),
        pid,
        heartbeat_ms,
        fingerprint: "fp".into(),
        endpoint_hash: String::new(),
        socket_path: String::new(),
        schema: SCHEMA,
        path: String::new(),
    }
}

#[test]
fn pidless_lease_staleness_uses_inclusive_ttl() {
    let l = lease("plugin", 0, 100);
    assert!(l.is_fresh(145, 45, true));
    assert!(!l.is_fresh(146, 45, true));
    // Without a pid the process table is not consulted.
    assert!(l.is_fresh(145, 45, false));
}

#[test]
fn dead_pid_is_immediately_stale() {
    let leases = vec![lease("native", 999_999_999, 1_000)];
    let decision = resolve_writer("fp", false, false, &leases, 1_000, DEFAULT_TTL_MS, &vec![false]);
    assert!(!decision.native_live);
    assert!(decision.lease_stale);
    assert_eq!(decision.writer, "plugin");
    assert!(decision.native_detected);
}

#[test]
fn fresh_native_claim_blocks_plugin() {
    let leases = vec![lease("native", 7, 1_000)];
    let decision = resolve_writer("fp", false, false, &leases, 2_000, DEFAULT_TTL_MS, &vec![true]);
    assert!(decision.native_live);
    assert!(decision.yields());
    assert_eq!(decision.outcome(), "native_owns");
    assert_eq!(claim_plugin_plan(&decision), None);
}

#[test]
fn force_plugin_replaces_native_claim() {
    let leases = vec![lease("native", 7, 1_000)];
    let decision = resolve_writer("fp", true, false, &leases, 2_000, DEFAULT_TTL_MS, &vec![true]);
    assert!(!decision.native_live);
    assert!(!decision.yields());
    assert_eq!(decision.writer, "plugin-forced");
    assert_eq!(decision.owner.as_deref(), Some("plugin"));
    assert_eq!(claim_plugin_plan(&decision), Some(true));
}

#[test]
fn plugin_heartbeat_preserves_unspecified_metadata() {
    let mut l = lease("plugin", 5, 1_000);
    l.socket_path = "/tmp/herdr.sock".into();
    l.endpoint_hash = "hash".into();
    let decision = resolve_writer("fp", false, false, &vec![l], 1_500, DEFAULT_TTL_MS, &vec![true]);
    assert!(decision.plugin_live);
    assert_eq!(decision.writer, "plugin");
    match heartbeat_plugin_plan(&decision, "", "") {
        HeartbeatPlan::Refresh { socket_path, endpoint_hash } => {
            assert_eq!(socket_path, "/tmp/herdr.sock");
            assert_eq!(endpoint_hash, "hash");
        }
        other => panic!("unexpected plan {other:?}"),
    }
}

#[test]
fn plugin_heartbeat_without_lease_claims() {
    let decision = resolve_writer("fp", false, false, &Vec::new(), 0, DEFAULT_TTL_MS, &Vec::new());
    assert!(!decision.plugin_live && !decision.native_live);
    assert_eq!(decision.outcome(), "unclaimed");
    assert!(matches!(heartbeat_plugin_plan(&decision, "s", "h"), HeartbeatPlan::Claim));
}

#[test]
fn native_heartbeat_yields_to_other_native_process() {
    let leases = vec![lease("native", 7, 1_000)];
    let decision = resolve_writer("fp", false, false, &leases, 1_000, DEFAULT_TTL_MS, &vec![true]);
    assert!(matches!(heartbeat_native_plan(&decision, "", "", 8), HeartbeatPlan::Yield));
    assert!(matches!(heartbeat_native_plan(&decision, "/s", "", 7), HeartbeatPlan::Refresh { .. }));
}

#[test]
fn native_claim_refused_over_live_plugin_of_other_process() {
    let leases = vec![lease("plugin", 7, 1_000)];
    let decision = resolve_writer("fp", false, false, &leases, 1_000, DEFAULT_TTL_MS, &vec![true]);
    assert!(!claim_native_allowed(&decision, 8));
    assert!(claim_native_allowed(&decision, 7));
}

#[test]
fn native_outranks_newer_plugin_and_first_best_wins() {
    let leases = vec![lease("plugin", 0, 900), lease("native", 0, 500), lease("native", 0, 500)];
    let (live, stale) = pick_lease(&leases, 1_000, DEFAULT_TTL_MS, &vec![true, true, true]);
    assert_eq!(live.unwrap().owner, "native");
    assert!(stale.is_empty());
    let (live, stale) = pick_lease(&leases, 100_000, 1_000, &vec![true, true, true]);
    assert!(live.is_none());
    assert_eq!(stale.len(), 3);
}

#[test]
fn lease_ttl_configuration() {
    assert_eq!(parse_lease_ttl(""), 45_000);
    assert_eq!(parse_lease_ttl(" 5000 "), 5_000);
    assert_eq!(parse_lease_ttl("10"), 1_000);
    assert_eq!(parse_lease_ttl("abc"), 45_000);
    assert_eq!(parse_lease_ttl("-5"), 45_000);
    assert_eq!(parse_lease_ttl("99999999999999999999"), 45_000);
}

#[test]
fn env_flags_accept_the_documented_spellings() {
    assert!(truthy_flag("  YES "));
    assert!(truthy_flag("1"));
    assert!(truthy_flag("On"));
    assert!(!truthy_flag("0"));
    assert!(!truthy_flag(""));
}

#[test]
fn writer_paths_cover_every_root() {
    let roots = vec!["/x".to_string(), "/y/".to_string()];
    assert_eq!(
        writer_paths("fp", "plugin", &roots).unwrap(),
        vec![
            "/x/writer-fp.json", "/x/plugin-live-fp", "/x/plugin-live",
            "/y/writer-fp.json", "/y/plugin-live-fp", "/y/plugin-live",
        ]
    );
    assert_eq!(writer_paths("fp", "other", &roots).unwrap_err(), "unknown handoff owner: other");
}

#[test]
fn marker_and_restore_paths() {
    assert_eq!(legacy_native_marker_path("fp", "/s"), "/s/native-live-fp");
    assert_eq!(plugin_marker_path("fp", "/s/"), "/s/plugin-live-fp");
    assert_eq!(
        restore_paths("deadbeef", &vec!["/a".to_string(), "/b".to_string()]),
        vec!["/a/restore-deadbeef.json", "/b/restore-deadbeef.json"]
    );
}

#[test]
fn candidate_paths_are_unique() {
    let roots = vec!["/a".to_string(), "/a".to_string()];
    let paths = candidate_paths("fp", &roots);
    assert_eq!(paths.len(), 6);
    assert_eq!(paths[0], "/a/writer-fp.json");
    assert_eq!(paths[5], "/a/writer.json");
}
