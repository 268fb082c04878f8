use cmux_herdr::nest::{nest_prune, nest_step, NestDecision, NestOutcome, NestTally};

fn tally() -> NestTally {
    NestTally { ok: true, created: vec![], reused: vec![], renamed: vec![], pruned: vec![], errors: vec![] }
}

#[test]
fn nest_steps_tally_reuse_create_and_prune() {
    let mut t = tally();
    let reuse = NestDecision::Reuse {
        herdr_id: "h1".to_string(),
        cmux_id: "workspace:4".to_string(),
        title: "dev".to_string(),
        rename: true,
    };
    let bound = nest_step(&mut t, &reuse, &NestOutcome::Reused { rename: Some(Ok(())), grouped: Ok(()) });
    assert_eq!(bound.as_deref(), Some("workspace:4"));
    assert_eq!((t.reused.clone(), t.renamed.clone(), t.ok), (vec!["h1".to_string()], vec!["h1".to_string()], true));

    let bound = nest_step(
        &mut t,
        &reuse,
        &NestOutcome::Reused { rename: Some(Err("rename failed".to_string())), grouped: Err("group failed".to_string()) },
    );
    assert_eq!(bound.as_deref(), Some("workspace:4"));
    assert!(!t.ok);
    assert_eq!(t.errors, vec!["rename failed".to_string(), "group failed".to_string()]);
    assert_eq!(t.renamed.len(), 1);

    let create = NestDecision::Create { herdr_id: "h2".to_string(), title: "ops".to_string() };
    let bound = nest_step(&mut t, &create, &NestOutcome::Created(Ok("workspace:9".to_string())));
    assert_eq!(bound.as_deref(), Some("workspace:9"));
    assert_eq!(t.created, vec!["h2".to_string()]);
    let bound = nest_step(&mut t, &create, &NestOutcome::Created(Err("no room".to_string())));
    assert_eq!(bound, None);
    assert_eq!(t.errors.last().map(String::as_str), Some("no room"));
    assert_eq!(nest_step(&mut t, &NestDecision::Skip, &NestOutcome::Created(Ok("x".to_string()))), None);

    assert!(nest_prune(&mut t, "h7", None));
    assert!(nest_prune(&mut t, "h8", Some(Ok(()))));
    assert!(!nest_prune(&mut t, "h9", Some(Err("close failed".to_string()))));
    assert_eq!(t.pruned, vec!["h7".to_string(), "h8".to_string()]);
    assert_eq!(t.errors.last().map(String::as_str), Some("close failed"));
}
