use cmux_herdr::api::{allowed_methods, assert_method_allowed, cli_pane_target, is_replay_safe};

#[test]
fn forbidden_and_prefixes_rejected() {
    assert!(assert_method_allowed("server.stop").is_err());
    assert!(assert_method_allowed("pane.graphics.frame").is_err());
    assert!(assert_method_allowed("plugin.install_anything").is_err());
    assert!(assert_method_allowed("").is_err());
    assert!(assert_method_allowed("does.not.exist").is_err());
}

#[test]
fn allowlist_membership() {
    assert_eq!(assert_method_allowed(" ping ").unwrap(), "ping");
    assert!(assert_method_allowed("pane.split").is_ok());
    // The allowlist holds 73 distinct published methods.
    assert_eq!(allowed_methods().len(), 73);
}

#[test]
fn replay_safe_classification() {
    assert!(is_replay_safe("session.snapshot"));
    assert!(is_replay_safe("pane.read"));
    assert!(!is_replay_safe("pane.split"));
    assert!(!is_replay_safe("pane.close"));
    assert!(!is_replay_safe("workspace.create"));
}

#[test]
fn cli_pane_target_flags() {
    assert_eq!(cli_pane_target("p1"), vec!["--pane".to_string(), "p1".to_string()]);
    assert_eq!(cli_pane_target(""), vec!["--current".to_string()]);
}

#[test]
fn forbidden_error_names_the_method() {
    let err = assert_method_allowed("server.stop").unwrap_err();
    assert!(err.0.contains("server.stop"));
}
