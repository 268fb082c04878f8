use cmux_herdr::verbs::{verb_request, VerbOptions, VerbParam};

fn opts() -> VerbOptions {
    VerbOptions {
        label: None,
        workspace: None,
        tab_id: None,
        cwd: None,
        workspace_id: None,
        pane_id: None,
        mode: None,
        direction: None,
        amount: None,
        target: None,
        text: vec![],
        tab: None,
        pane: None,
        index: None,
        title: None,
        body: None,
    }
}

fn text(k: &str, v: &str) -> (String, VerbParam) {
    (k.to_string(), VerbParam::Text(v.to_string()))
}

#[test]
fn verbs_name_method_params_and_message() {
    let mut o = opts();
    o.tab_id = Some("t1".to_string());
    o.label = Some(String::new());
    o.index = Some(2);
    o.workspace = Some("w9".to_string());
    let r = verb_request("move-tab", &o).unwrap();
    assert_eq!(r.method, "tab.move");
    assert_eq!(
        r.params,
        vec![text("tab_id", "t1"), ("index".to_string(), VerbParam::Index(2)), text("workspace_id", "w9")]
    );
    assert_eq!(r.message.as_deref(), Some("moved tab t1"));
    let r = verb_request("rename-tab", &o).unwrap();
    assert_eq!(r.params, vec![text("tab_id", "t1")]);
    assert_eq!(r.message.as_deref(), Some("renamed tab t1"));
    assert!(verb_request("explode", &o).is_none());
}

#[test]
fn swap_send_and_resize_parameters() {
    let mut o = opts();
    o.pane_id = Some("p1".to_string());
    o.target = Some("p2".to_string());
    o.direction = Some("left".to_string());
    let r = verb_request("swap-pane", &o).unwrap();
    assert_eq!(
        r.params,
        vec![text("pane_id", "p1"), text("source_pane_id", "p1"), text("target_pane_id", "p2"), text("direction", "left")]
    );
    o.text = vec!["echo".to_string(), "hi".to_string()];
    let r = verb_request("send", &o).unwrap();
    assert_eq!(r.method, "pane.send_text");
    assert_eq!(r.params, vec![text("pane_id", "p1"), text("text", "echo hi")]);
    assert_eq!(r.message.as_deref(), Some("sent text to p1"));
    o.amount = Some("2.5".to_string());
    let r = verb_request("resize-pane", &o).unwrap();
    assert_eq!(
        r.params,
        vec![text("pane_id", "p1"), text("direction", "left"), ("amount".to_string(), VerbParam::Amount("2.5".to_string()))]
    );
    let r = verb_request("layout", &o).unwrap();
    assert_eq!((r.method.as_str(), r.message), ("layout.export", None));
    let r = verb_request("agent-explain", &o).unwrap();
    assert_eq!(r.params, vec![text("target", "p2"), text("pane_id", "p2")]);
    assert_eq!(r.message.as_deref(), Some("explain p2"));
}
